# shade

Graphics and retained-GUI building blocks whose rules are proved with Verus.

`src/` is the verified library:

- `slotmap`, `generation`, `handle`: stable keys, generation counters and object handles.
- `geom`, `context`: integer points and rectangles, and the context a widget is laid out in.
- `graphics`, `pipeline`, `drawbuf`, `image`, `dither`: pipeline state, the checks a draw
  call passes, immediate-mode geometry batching, image sprite gutters, dither patterns.
- `scene`, `gui`, `widgets`, `scroll`, `slider`, `props`, `event`, `dto`, `dispatch`: the
  retained GUI — its structure (parents, shown widgets, popup menus, pointer capture), its
  widgets and how they react to the mouse, the step-by-step routing of a mouse event
  through a scene, and scenes built from declarative descriptions.
- `built`: what building a declarative tree leaves in a scene — each declared widget
  becomes a retained widget of its kind under its own key, linked to the widgets built
  from its children (and the menus its items open) as the declaration nests them, with
  each name recorded under the key of the widget that carries it.
- `paint`, `decor`: what each widget draws, as a list of shapes in scene coordinates.

`app/` holds what the library leaves to its caller: OpenGL calls (draw state, draw calls,
shader compilation), `cvmath` conversions, the application state that stores widget
properties, the loop that runs the library's mouse-dispatch steps, layout driven through
the library's decisions, and the slider's fractional value.

`tests/` exercises the library on concrete scenes and values.
