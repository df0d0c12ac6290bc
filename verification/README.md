# fyrox_gfx

Graphics effects for the Fyrox engine - refractive glass, soft shadows, temporal anti-aliasing,
ambient occlusion, ray-marched reflections, ray-traced shadows, and budgets for lights and their
shadows - with the rules behind them verified.

- `src/` is the verified library: the light and shadow budgets (which lights keep their shadows,
  which stay lit, what the game set up itself), the Halton sequence that shifts the view for
  temporal anti-aliasing, what the plugin sets up, does every frame and undoes, and the integer
  work of shadow tracing. Each public function states its result exactly; the laws the budgets and
  the view shifts keep (the nearest lights win, the budget is filled, it settles, the shifts cover
  the pixel and repeat every eight frames) are proof functions beside them.
- `app/` is the engine-facing plugin: it reads the scene and the renderer, asks the library, and
  applies what it decides. Render passes, shaders and floating-point settings live there.
- `tests/` runs the library on concrete scenes.
